//! Save-game backup and restore logic: game names, backup archives,
//! save-path patterns, launcher inference and launcher libraries.

pub mod platform;
pub mod text;
pub mod utils;
pub mod paths;
pub mod gamedb;
pub mod patterns;
pub mod backups;
pub mod restore;
pub mod backup;
pub mod game;
pub mod infer;
pub mod scanner;
pub mod commands;

pub use restore::Error as RestoreError;
