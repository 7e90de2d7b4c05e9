//! Reads the articles of a DC Inside mobile gallery, with their comments,
//! and lays each out as the text it is saved as.
//!
//! - `data_list`: articles and comments, and the saved text of an article;
//! - `scrape`: what the board page, an article's page and the comment
//!   service's answer say;
//! - `address`: page addresses and save paths;
//! - `text`: numbers, replacement and other character-level operations;
//! - `outside`: the calls into `scraper`, `regex` and `html2text`.
pub mod address;
pub mod constants;
pub mod data_list;
pub mod error;
pub mod scrape;
mod outside;
pub mod text;
