//! An agent that answers a user by talking to a language model and running tools.
pub mod json;
pub mod text;
pub mod models;
pub mod retry;
pub mod stream;
pub mod agent;
pub mod tools;
