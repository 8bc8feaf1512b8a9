//! What the overlay knows of a repository.
pub mod commit;
pub mod context;
pub mod diff;
pub mod graph;
pub mod lanes;
pub mod numbering;
pub mod order;
pub mod refs;
pub mod repo;
pub mod working;
