//! The catalogue of preserved game objects: their model and classification,
//! the search-index documents and requests, the database query and its
//! keyset pages, collections, and user tokens.
pub mod api;
pub mod auth;
pub mod codec;
pub mod collection;
pub mod meili;
pub mod object;
pub mod schema;
pub mod text;
