//! The logic behind the commands of the tool.

pub mod cat;
