//! Log presentation for a build-progress display: a per-step log history that
//! is replayed as a nested block when the step stops, and a fixed-size window
//! of display slots that shows the most recent lines while the step runs.

pub mod action;
pub mod handler;
pub mod replay;
pub mod style;
pub mod text;
pub mod tree;
pub mod window;
