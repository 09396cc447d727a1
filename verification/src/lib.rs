//! Rendering core of a small web browser: HTML and CSS parsing, style
//! resolution, block/inline layout and display-list emission, with every
//! stage stated and proved against a mathematical model.

pub mod browser;
pub mod constants;
pub mod display_item;
pub mod error;
pub mod http;
pub mod text;
pub mod tree;
pub mod url;
pub mod utils;
pub mod renderer;
