//! The verified core of asd, a terminal session multiplexer: the wire protocol
//! and its paths, the git overlay, and the GUI client's decisions.
pub mod geometry;
pub mod git;
pub mod gui;
pub mod input;
pub mod path;
pub mod proto;
pub mod screen;
pub mod search;
pub mod state;
pub mod style;
pub mod text;
pub mod ui;
pub mod worker;
