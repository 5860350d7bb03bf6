//! A review session over a list of text examples: a cursor, a fixed
//! vocabulary of labels, and the commands that move the cursor and change
//! the label under it.

pub mod app;
pub mod command;
pub mod example;
pub mod model;
pub mod render;
