//! Turns a line-oriented log of short dated posts into RSS 2.0, Atom and
//! JSON Feed documents.
//!
//! The log is parsed by [`parser::get_posts`]; each post derives a stable
//! identifier and a slug ([`post::Post::stable_id`], [`post::Post::slug`]);
//! the three documents are assembled by the functions of [`feed`].

pub mod text;
pub mod time;
pub mod identity;
pub mod post;
pub mod parser;
pub mod feed;
