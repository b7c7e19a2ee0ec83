pub mod callbacks;
pub mod config;
pub mod events;
pub mod generation;
pub mod gpt;
pub mod kv;
pub mod sampling;
pub mod service;
pub mod session;
pub mod snapshot;
pub mod text;

pub use callbacks::{register_eval_callback, unregister_eval_callback};
pub use service::{ModelHashError, ModelLoadError, ModelUnloadError, Service, SimularityModelInfo};
