//! A tree-shaped task organizer: boards of columns of tasks, where each task
//! may hold a nested board, a to-do list or free text, together with the
//! navigation and mutation engine that edits the tree through a path of
//! indices and a cursor.
pub mod app;
pub mod edit;
pub mod keys;
pub mod model;
pub mod path;
pub mod text;
pub mod todo;
pub mod view;
