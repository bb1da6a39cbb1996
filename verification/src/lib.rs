//! Query helpers for Wikipedia: language detection, URL encoding, terminal
//! layout, command-line handling and reading the search API's answer.
pub mod lang;
pub mod text;
pub mod wiki;
pub mod output;
pub mod json;
pub mod cli;
pub mod interactive;
