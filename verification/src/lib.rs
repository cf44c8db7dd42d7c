//! A verified control plane for a dynamic media pipeline.
//!
//! The library keeps a model of the pipeline graph and decides, one request at
//! a time, what the streaming engine is to be asked next. The caller performs
//! each request on the engine and reports whether it was accepted.

pub mod bounds;
pub mod error;
pub mod filters;
pub mod graph;
pub mod gstreamer;
pub mod machine;
pub mod playback;
pub mod progress;
pub mod request;
pub mod router;
pub mod slot;
pub mod source;
pub mod topology;
pub mod unit;
pub mod window;
