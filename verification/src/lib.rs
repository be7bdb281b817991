//! Compiles a collection of song files into one songbook document.
//!
//! Each song file carries a block of `key: value` front matter, a terminator
//! line and a typeset-music body. The library splits the two, reads the
//! metadata, resolves the transposition, fills the placeholders of seven
//! templates and concatenates the result in alphabetical order of the titles.
//! Reading and writing files is left to the caller.

pub mod args;
pub mod book;
pub mod error;
pub mod frontmatter;
pub mod metadata;
pub mod order;
pub mod replace;
pub mod song;
pub mod template;
pub mod text;
pub mod transpose;
pub mod trim;
pub mod utils;

