//! What the operations of this crate are for, as laws over all inputs.
//!
//! Each law relates what goes into an operation to what comes out of it, in terms
//! of the values themselves: characters, numbers, names, shapes and elements.
pub mod models;
pub mod numbers;
pub mod operations;
pub mod requests;
pub mod settings;
pub mod tensors;
pub mod text;
