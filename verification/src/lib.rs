//! A speed test service for several lines: what it decides, apart from files, sockets and the
//! database.
//!
//! `config` and `domains` turn a configuration file into the targets that visitors test, `app`
//! decides on requests, `store` writes the statements for the database, `tokens` guards later
//! states of a result, `ip` reads and masks addresses and `page` is what visitors see. What holds
//! of them together stands in the modules that end in `_laws`, in `tokens` and in `page`.
pub mod app;
pub mod app_laws;
pub mod clock;
pub mod config;
pub mod config_laws;
pub mod domains;
pub mod domains_laws;
pub mod ip;
pub mod ip_grammar_laws;
pub mod ip_laws;
pub mod models;
pub mod page;
pub mod page_text;
pub mod store;
pub mod store_laws;
pub mod text;
pub mod text_laws;
mod text_lemmas;
pub mod tokens;
