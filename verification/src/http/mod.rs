//! The parts of HTTP that requests are routed by.
pub mod error;
pub mod path;
pub mod url;

pub use error::Error;
pub use path::Path;
pub use url::urldecode;
