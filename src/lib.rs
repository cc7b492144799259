//! Cross-platform audio stream bridge: sample formats, format negotiation,
//! the realtime buffer bridge between a backend's native callback and a
//! user callback, and stream lifecycle control.

pub mod bridge;
pub mod device;
pub mod error;
pub mod event_loop;
pub mod format;
pub mod stream;
pub mod wiring;

pub use bridge::{Buffer, InputBridge, InputCallback, OutputBridge, OutputCallback};
pub use device::{
    default_input_device, default_output_device, devices, input_devices, output_devices, Device,
    Devices, SupportedInputFormats, SupportedOutputFormats,
};
pub use error::{CreationError, DefaultFormatError, FormatsEnumerationError};
pub use event_loop::{Direction, EventLoop, StreamId, StreamState};
pub use format::{is_format_supported, ChannelCount, Format, SampleFormat, SampleRate, SupportedFormat};
pub use stream::{InputHandler, OutputHandler, Stream};
pub use wiring::PortWiring;
