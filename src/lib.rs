//! Core of a real-time broadcast hub: identity allocation, message
//! annotation, the connection registry and the per-connection lifecycle.

pub mod allocator;
pub mod annotate;
pub mod envelope;
pub mod hub;
pub mod registry;

pub use allocator::IdAllocator;
pub use annotate::{
    annotate_message, annotate_trimmed, ends_in_image_extension, is_absolute_image_uri, is_data_image_uri, is_img_uri, is_uri_char,
    wrap_image, UriParts,
};
pub use envelope::{frame, Envelope};
pub use hub::Hub;
pub use registry::Registry;
