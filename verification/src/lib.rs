//! Makes an e-book of a serial that is published on the web, chapter by chapter.
//!
//! A site adapter (`source`) reads the index page of a book and the pages of its chapters.
//! The documents of the book are rendered as markup (`template`) and packed into one
//! archive (`package`). The run for one book is a machine (`pipeline`) that says what to
//! fetch and what to write; fetching and writing are left to the caller.

pub mod book;
pub mod download;
pub mod html;
pub mod locator;
pub mod markup;
pub mod package;
pub mod pipeline;
pub mod source;
pub mod template;
pub mod text;
pub mod timestamp;

pub use crate::book::BookInfo;
