//! The elements that come with the runtime: two leaves and four layouts.

pub mod bottom_column_element;
pub mod char_element;
pub mod column_element;
pub mod left_row_element;
pub mod row_element;
pub mod string_element;
