//! Mirrors a web novel, published chapter by chapter on a remote site, into
//! an EPUB archive, and brings such an archive up to date by fetching only
//! what changed since it was written.
//!
//! The library holds the decisions and the formats: which chapters of a
//! freshly fetched index have to be fetched ([`updater`]), what to do with
//! the answer to a request ([`request`]), how scraped HTML is cleaned
//! ([`sanitize`]), what an image is and how large it may be ([`images`]),
//! what the documents and entries of an archive are ([`epub`], [`archive`])
//! and how a chapter is read back out of one ([`parse`]). Sending requests,
//! sleeping and touching the disk is left to the caller.

pub mod api;
pub mod archive;
pub mod book;
pub mod cache;
pub mod dates;
pub mod epub;
pub mod failure;
pub mod fanficfare;
pub mod html;
pub mod images;
pub mod koreader;
pub mod links;
pub mod markup;
pub mod parse;
pub mod request;
pub mod sanitize;
pub mod source;
pub mod text;
pub mod updater;
