//! Supervisory core of an agent-CLI desktop workbench: path codec, project
//! registry, process supervision, checkpoints and routing rules.
pub mod text;
pub mod codec;
pub mod projects;
pub mod hidden;
pub mod checkpoint;
pub mod rules;
pub mod registry;
pub mod supervisor;
pub mod permissions;
pub mod launch;
pub mod health;
pub mod hooks;
pub mod routing;
pub mod version;
pub mod sessions;
pub mod analysis;
