//! Escape-time fractal rasterizer: the integer core.
//!
//! The library holds the parts of the renderer that are exact integer
//! computations: the gradient color mapper, the assembly of the RGBA frame
//! buffer from per-pixel iteration counts, parameter validation, and the
//! `Screen` container handed to a host. The floating-point stages (viewport
//! mapping and the escape-time recurrence) produce the per-pixel counts that
//! `frame::get_pixels` consumes.

mod color;
mod frame;
mod params;
mod screen;

pub use color::Color;
pub use color::SEGMENTS;
pub use color::color_at;
pub use color::lerp_channel;
pub use color::palette_stop;
pub use color::pixel_color;
pub use color::segment_of;
pub use color::lemma_segment_in_range;
pub use frame::MAX_ITERATIONS;
pub use frame::frame_of;
pub use frame::get_pixels;
pub use frame::lemma_alpha_invariant;
pub use frame::lemma_frame_deterministic;
pub use frame::lemma_row_major_offset;
pub use frame::pixel_bytes_ok;
pub use params::RenderError;
pub use params::validate_params;
pub use screen::Screen;
