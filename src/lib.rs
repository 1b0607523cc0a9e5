//! Local mirror of the MusicBrainz database: the replication and ingest engine.
pub mod apply;
pub mod bootstrap;
pub mod cli;
pub mod control;
pub mod driver;
pub mod dump;
pub mod error;
pub mod packet;
pub mod pending;
pub mod progress;
pub mod settings;
pub mod sql;
pub mod text;

pub use error::MbLightError;
pub use settings::{MbLightSettingsExt, Settings};
