//! Logic of a terminal package manager front end for pacman and yay:
//! package lists and their cache, the commands it runs, fuzzy search and
//! the state of its interactive screens.
pub mod text;
pub mod cache;
pub mod order;
pub mod package;
pub mod search;
pub mod editor;
pub mod ui;
pub mod route;
pub mod render;
