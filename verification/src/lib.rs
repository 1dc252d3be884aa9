//! Verified core logic of the vellum drawing overlay.

pub mod protocol;
pub mod history;
pub mod document;
pub mod text_edit;
pub mod damage;
pub mod editor;
pub mod tool;
pub mod settings;
pub mod config_files;
pub mod input;
pub mod keys;
pub mod handles;
pub mod stroke;
pub mod adjust;
