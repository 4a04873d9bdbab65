//! A retained-mode, reactive rendering runtime for text-cell user interfaces.
//!
//! A tree of components rebuilds itself when state changes, routes typed
//! messages down the tree, and turns itself once per frame into an ordered
//! list of drawing operations positioned by relative anchors.

pub mod display_list;
pub mod element;
pub mod elements;
pub mod geometry;
pub mod identity;
pub mod layout;
pub mod message;
pub mod render;
pub mod runtime;
pub mod widget;
pub mod widgets;
