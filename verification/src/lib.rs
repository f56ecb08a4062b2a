//! MediaScrapeLang: a small scripting language for sequential web-scraping
//! workflows ("open a page, follow a link, extract values, filter and download
//! media, wait"), together with the stateful engine that interprets a parsed
//! script.
//!
//! The crate contains the language front end (a recursive-descent parser
//! producing an abstract syntax tree) and the session engine, modelled as a
//! state machine that decides what each command does; all network, HTML and
//! filesystem work is carried out by the caller, which feeds the results back
//! into the engine.

pub mod ast;
pub mod engine;
pub mod grammar;
pub mod laws;
pub mod parser;
pub mod scraper;
pub mod text;

pub use engine::MslEngine;
pub use parser::parse_script;
pub use parser::MslError;
pub use parser::MslScript;
pub use scraper::ScrapingResult;
