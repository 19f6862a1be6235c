//! Launch and resume plans for the Kiro coding-agent CLI, the time-gap log
//! normalisation pipeline that turns its raw output into indexed entries, and
//! the composition of setup actions ahead of previously scheduled work.
pub mod actions;
pub mod command;
pub mod index;
pub mod kiro;
pub mod logs;
