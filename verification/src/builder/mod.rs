//! Putting a node together.
pub mod accounts;
pub mod error;
pub mod migration;
pub mod node_builder;
pub mod options;
pub mod stages;

pub use self::error::BuildError;
pub use self::migration::ChannelDataMigration;
pub use self::node_builder::NodeBuilder;
