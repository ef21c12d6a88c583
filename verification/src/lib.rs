//! The integer core of a small offline ray tracer.
//!
//! The floating-point geometry lives with the program that renders; this
//! library holds what can be stated exactly: the pixel buffer a render writes
//! into, its plain-text PPM encoding, the source of sampling jitter, and the
//! rule that bounds the length of a light path.

pub mod error_handler;
pub mod image_buffer;
pub mod integrator;
pub mod ppm;
pub mod sampling;

pub use error_handler::RayTracerError;
pub use error_handler::RayTracerResult;
pub use image_buffer::ImageBuffer;
pub use image_buffer::Pixel;
pub use sampling::random_from_0_to_1;
