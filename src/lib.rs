//! An image-derivative gateway: typed request parameters, output-format
//! policy, dimension arithmetic, the content-addressed derivative cache and
//! the decisions of the processing pipeline.

pub mod cache;
pub mod converters;
pub mod crypto;
pub mod dimensions;
pub mod formats;
pub mod parameters;
pub mod pipeline;
pub mod service;
pub mod text;
