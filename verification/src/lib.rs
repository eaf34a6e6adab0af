//! Rolling statistical indicators over an irregular, timestamped stream of
//! observations.
//!
//! Every indicator keeps just enough history to give its reading after each new
//! observation. The indicators are generic over the number type they compute
//! with ([`scalar::Scalar`]); what each `next` call did is stated in terms of
//! that type's own arithmetic.
pub mod config;
pub mod error;
pub mod indicators;
pub mod laws;
pub mod runner;
pub mod running;
pub mod scalar;
pub mod settings;
pub mod text;
pub mod time;
pub mod traits;
pub mod types;
pub mod window;
