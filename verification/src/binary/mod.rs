pub mod format;
pub mod header;
pub mod model;
pub mod options;
pub mod encoding;
pub mod codec;
