use vstd::prelude::*;

pub mod error;
pub mod files;
pub mod home;
pub mod media;
pub mod ops;
pub mod paths;
pub mod pipeline;
pub mod presets;
pub mod runner;
pub mod session;
pub mod settings;
pub mod text;
pub mod validate;

pub use error::Error;
pub use pipeline::{Pipeline, Step};
pub use settings::{Settings, Theme};

verus! {

} // verus!
