//! Core logic of a feed-forward neural-network trainer: dataset container
//! parsing, training configuration, batch scheduling, layer-shape bookkeeping,
//! and the sign-driven decisions of the RPROP weight-update rule.
//!
//! The floating-point work itself — activations, gradients, weight steps and
//! the serialized model — lives with the numeric layer around this crate;
//! everything decided on plain values is specified and verified here.

pub mod batching;
pub mod config;
pub mod digiter;
pub mod layer;
pub mod transfer;

pub use batching::batch_indices;
pub use batching::chunk_bounds;
pub use batching::progress_window;
pub use batching::random_batch_begin;
pub use batching::xorshift;
pub use config::Config;
pub use config::ConfigError;
pub use config::ProgramMode;
pub use digiter::DatasetFormatError;
pub use digiter::Digiter;
pub use digiter::ImagesReader;
pub use digiter::LabelsReader;
pub use layer::DefaultLayerSettings;
pub use layer::LayerShape;
pub use layer::RpropDecision;
pub use layer::StoredLayerShape;
pub use layer::stored_layer_consistent;
pub use layer::stored_model_consistent;
pub use layer::layer_shapes;
pub use layer::rprop_decide;
pub use transfer::TransferFunction;
