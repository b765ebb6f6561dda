//! The doctor command: checks of a project's setup.
pub mod report;
pub mod checks;
pub mod evaluate;
