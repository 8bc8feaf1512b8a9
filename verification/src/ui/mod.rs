//! Drawing the overlay.
pub mod colors;
pub mod commit_detail;
pub mod file_diff;
pub mod file_list;
pub mod graph_view;
pub mod help;
pub mod highlight;
pub mod layout;
pub mod markdown;
pub mod panes;
pub mod prose;
pub mod search;
pub mod wrapping;
pub mod writing;
