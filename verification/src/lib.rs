//! Verified core of a terminal front end for Spring Boot applications.

pub mod actuator;
pub mod app_state;
pub mod config;
pub mod display;
pub mod dumps;
pub mod generator;
pub mod initializr;
pub mod input;
pub mod json;
pub mod model;
pub mod paths;
pub mod prompts;
pub mod render;
pub mod text;
pub mod thread_dump;
pub mod tui;
pub mod wizard;
