//! A small service library around a "Foo" record kept in two backends: a
//! document store addressed by id and a search index queried by free text.
//! The modules here hold the parts that can be stated and proved: request
//! validation, record generation, query construction, error mapping, health
//! aggregation, and the documented effect of each backend operation.

pub mod configuration;
pub mod error;
pub mod handlers;
pub mod repository;
pub mod text;
