pub mod binder;
pub mod builtin;
pub mod equality;
pub mod error;
pub mod laws;
pub mod misc;
pub mod names;
pub mod native;
pub mod settings;
pub mod state;
pub mod typed;
pub mod value;
