pub mod json;
pub mod text;
pub mod words;
pub mod transcript;
pub mod devices;
pub mod shortcut;
pub mod service;
pub mod key_test;
pub mod sound;
pub mod settings;
pub mod state;
pub mod laws;
