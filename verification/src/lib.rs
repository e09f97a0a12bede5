//! Finds the daily crossword among the scanned pages of a newspaper's web
//! archive: parses the image map of each candidate page, matches its regions
//! against the place where the crossword is printed, and drives the bounded
//! search over the pages.

pub mod crossword;
pub mod http;
pub mod markup;
pub mod parser;
pub mod text;
pub mod types;
