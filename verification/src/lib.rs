//! Decision logic of a capture-to-canvas renderer: the texture state machine of the
//! fullscreen node, the layout of its bind group, the packing of captured BGRA frames
//! and the rules that pick the captured window and route stream events.

pub mod binding;
pub mod capture_rules;
pub mod pixels;
pub mod texture_state;

pub use binding::{bind_group_slots, BindingSlot, BindingSource};
pub use capture_rules::{
    first_capture_target, is_capture_target, matches_capture_rule, route_stream_event, BitmapFormat, FrameAction,
    StreamEventKind, WindowInfo,
};
pub use pixels::{bytes_per_row, flatten_pixels, texture_extent, TextureExtent};
pub use texture_state::{blend_state_or, FramePlan, TextureState};
