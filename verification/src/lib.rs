//! A small contact book: field validation, an in-memory collection of
//! contacts, and the decisions of the text menu that drives it.

pub mod book;
pub mod clock;
pub mod contact;
pub mod filters;
pub mod order;
pub mod pattern;
pub mod session;
pub mod sorting;
pub mod text;
pub mod validate;
