//! The rules of a personal knowledge base's web interface: how a captured
//! source is cut beside what was written from it, what a request may ask for,
//! what a day held, what is due, and what each page says of it.

pub mod api;
pub mod app;
pub mod artifact;
pub mod assets;
pub mod auth_routes;
pub mod capture;
pub mod client;
pub mod corpus;
pub mod corpus_view;
pub mod day;
pub mod due;
pub mod etag;
pub mod files;
pub mod json;
pub mod links;
pub mod records;
pub mod text;
pub mod zones;
