//! Khepri: the data model and editor logic of a small 2D scene editor.
pub mod scene;
pub mod text;
mod lemmas;
pub mod paths;
pub mod recent;
pub mod project;
pub mod hub;
pub mod editor;
