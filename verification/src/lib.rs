pub mod app;
pub mod document;
pub mod keyboard;
pub mod keys;
pub mod lessons;
pub mod settings;
pub mod stats;
pub mod text;
pub mod timestamp;
pub mod screen;
