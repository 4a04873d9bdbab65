//! The widgets that come with the runtime.

pub mod column;
pub mod feed;
pub mod row;
pub mod single_char;
pub mod single_line;
pub mod text;
