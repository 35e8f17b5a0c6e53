//! Site adapters for a manga reader: request routes, filter mapping, deep-link
//! resolution, chapter-title parsing and the mapping of site payloads onto the
//! reader's entities.
pub mod boylove;
pub mod encode;
pub mod entries;
pub mod error;
pub mod filters;
pub mod html;
pub mod iken;
pub mod json;
pub mod layout;
pub mod liliana;
pub mod models;
pub mod numeral;
pub mod query;
pub mod route;
pub mod signing;
pub mod sites;
pub mod tcbscans;
pub mod text;
pub mod title;
pub mod update;
