//! A small middleware framework for an HTTP-serving process: an ordered
//! pipeline of request-processing stages, any of which may end the chain
//! early, plus a static-file stage that maps URL paths to files beneath a
//! configured filesystem root and refuses any path that would escape it.

pub mod http;
pub mod paths;
pub mod pipeline;
pub mod static_file;
