//! A render-protocol core for a single rounded rectangle drawn with a
//! signed-distance-field shader.

pub mod binary32;
pub mod device;
pub mod linear;
pub mod pipeline;
pub mod rectangle;
pub mod surface;
pub mod wire;

pub use device::Device;
pub use device::DeviceError;
