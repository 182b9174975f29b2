//! A viewer for configuration documents: a tree of tables, arrays and
//! scalars, a resolver for dot-separated paths into it, and a renderer
//! that lays a tree out as sectioned, optionally colored text.
pub mod value;
pub mod path;
pub mod style;
pub mod render;
pub mod viewer;
