//! Core logic of a terminal wizard that bootstraps a GitOps repository:
//! the screen state machines, the component tree, the YAML value diff and
//! the plans of files and commands that the program carries out.


pub mod keys;
pub mod text;
pub mod input;
pub mod collections;
pub mod listing;
pub mod tree;
pub mod selection;
pub mod explorer;
pub mod yaml;
pub mod helm;
pub mod generate;
pub mod paths;
pub mod config;
pub mod home;
pub mod summary;
pub mod executing;
pub mod wizard;
pub mod actions;
pub mod git;
pub mod app;
pub mod bootstrap;
pub mod screens;
pub mod overview;
