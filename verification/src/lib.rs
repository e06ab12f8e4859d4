//! A file conversion bot for a messenger: which formats a file can become, the menu that
//! offers them, albums collected before the choice, and the steps of a conversion run.
pub mod dialogue;
pub mod files;
pub mod finish;
pub mod formats;
pub mod jobs;
pub mod media_group;
pub mod menu;
pub mod steps;
pub mod text;
