//! A todo list for the terminal, as a library: it reads the commands, keeps
//! the active list and the history of closed items, words what is shown,
//! and gives the list its text form for the store. The program around it
//! only reads and prints lines and moves the stored text to and from its
//! file.

pub mod command;
pub mod number;
pub mod render;
pub mod session;
pub mod store;
pub mod text;
pub mod turn;
