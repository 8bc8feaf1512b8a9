//! The GUI client's decisions: what its window, its connections and its
//! settings do, without the toolkit that draws them.
pub mod answers;
pub mod app;
pub mod conn;
pub mod copying;
pub mod key;
pub mod laws;
pub mod model;
pub mod painting;
pub mod render;
pub mod route;
pub mod settings;
pub mod theme;
pub mod update;
pub mod view;
pub mod vt;
pub mod window;
