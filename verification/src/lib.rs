//! Contemporary: the logic behind the widgets, jobs, assets and configuration
//! of the Contemporary user interface toolkit, stated and proved with Verus.
pub mod utf;
pub mod text_lines;
pub mod text_field;
pub mod text_layout;
pub mod jobs;
pub mod assets;
pub mod config;
pub mod components;
pub mod notification;
pub mod self_update;
