//! Decoder for the image-layer element of a tile-map document.
//!
//! A markup document describing a tile-based map is tokenized into a stream
//! of start/end/text events; this crate decodes one "imagelayer" subtree of
//! that stream into a typed record: the picture it references, its tiling
//! flags, and the user-defined properties attached to it.

mod coerce;
mod dispatch;
mod error;
mod events;
mod image;
pub mod laws;
mod layer;
mod numbers;
mod paths;
mod properties;

pub use error::Error;
pub use events::{Attribute, Event, EventStream};
pub use image::Image;
pub use layer::{decode_image_layer_document, ImageLayerData};
pub use numbers::parse_i32;
pub use paths::{join_path, parent_dir};
pub use properties::Properties;
