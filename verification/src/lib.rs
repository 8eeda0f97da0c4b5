//! Core of a game launcher: version descriptors, their inheritance, class
//! paths, argument templates, installation plans and the launch state machine.
pub mod arguments;
pub mod classpath;
pub mod installer;
pub mod json;
pub mod launcher;
pub mod manifest;
pub mod platform;
pub mod resolver;
pub mod runtime;
pub mod text;
pub mod theme;
