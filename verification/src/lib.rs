//! An interfacing library for grid-button MIDI control surfaces, providing
//! both low-level wire-protocol access and a high-level canvas abstraction.
//!
//! Every device operation builds the exact MIDI byte frames the device
//! understands and appends them to the output's frame queue; a thin transport
//! layer outside this crate drains the queue onto the wire and feeds received
//! frames back into the pure decoders.

pub mod canvas;
pub mod classic;
pub mod color;
pub mod double_buffering;
pub mod errors;
pub mod generic;
pub mod layout;
pub mod launch_control;
pub mod launchpad_midi_1;
pub mod launchpad_mini;
pub mod launchpad_mini_mk3;
pub mod launchpad_mk2;
pub mod launchpad_s;
pub mod midi_io;
pub mod minesweeper;
pub mod mock;
pub mod protocols;
pub mod query;
pub mod pad;
pub mod polling;
pub mod padded;
pub mod util;

pub use color::{
    bounded, clamp_component_spec, clamp_spec, color_sum_spec, fract_spec, from_hue_spec,
    lemma_hue_wheel_closes, lemma_quantize_range_correct, max3, mix_component_spec,
    quantize_component_spec, quantize_spec, triangle_wave_spec, Color, COLOR_BOUND, COLOR_UNIT,
};
pub use canvas::{
    lemma_valid_pads_complete, message_x_spec, message_y_spec, valid_pads, valid_pads_prefix,
    Canvas, CanvasIterator, CanvasMessage,
};
pub use errors::MidiError;
pub use generic::{DeviceCanvas, DeviceSpec};
pub use protocols::{
    abs_to_button_spec, button_abs_x_spec, button_abs_y_spec, default_logical_to_physical,
    default_physical_to_logical, logical_to_physical_spec, physical_to_logical_spec,
    LogicalButton, PhysicalButton,
};
pub use midi_io::{
    contains_bytes, find_matching_port, matches_at, name_contains_keyword, slice_contains,
    FrameQueue, InputDevice, OutputDevice,
};
pub use layout::{
    coord_key, global_coord_spec, inverse_spec, key_in_box, lemma_rotation_roundtrip,
    lemma_transform_white_fixed, to_global, transform_color, transform_component_spec,
    transformed_color_spec, translate_canvas_message, translate_spec,
    local_coord_spec, placement_in_range, CanvasLayout, LayoutError, Rotation,
};
pub use mock::MockCanvas;
pub use pad::Pad;
pub use polling::{
    canvas_message_channel, duration_from_millis, message_channel, send_message,
    CanvasLayoutPoller, CanvasPoller, DeviceCanvasPoller,
    IterFor, MsgPollingWrapper, PollOutcome, DRAIN_LIMIT,
};
pub use padded::PaddingCanvas;
pub use util::Array2d;

pub use launch_control as control;
pub use launch_control as control_xl;
pub use launch_control as launch_control_xl;
pub use launchpad_midi_1 as midi_1;
pub use launchpad_mini as mini;
pub use launchpad_mini_mk3 as mini_mk3;
pub use launchpad_mk2 as mk2;
pub use launchpad_s as s;
