//! The two backend repositories: the document store, looked up by id, and
//! the search index, queried by free text. Each module generates the
//! records an initialization writes and states, as a map from id to
//! description, what the backend holds after the documented operations.

pub mod es;
pub mod mongo;
