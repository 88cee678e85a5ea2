//! A single-user todo-item manager: create, list, complete, and delete short
//! text tasks with a priority tag. The store keeps one row per task; listing
//! follows a two-key ordering (priority rank or completion state, then newest
//! first). Command handlers wrap the store operations with the business rules
//! and a shared result-reporting convention.

pub mod todo;
pub mod store;
pub mod render;
pub mod commands;
pub mod decode;
pub mod laws;

pub use todo::Todo;
