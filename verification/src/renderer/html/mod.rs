pub mod attribute;
pub mod parser;
pub mod token;
