pub mod app;
pub mod dict;
pub mod error;
pub mod world;

pub use error::InputError;
