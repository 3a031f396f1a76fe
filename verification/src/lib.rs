pub mod actions;
pub mod config;
pub mod content;
pub mod data;
pub mod errors;
pub mod fetch;
pub mod fsio;
pub mod git;
pub mod laws;
pub mod run;
pub mod shortlink;
pub mod swap;
pub mod txt;
pub mod urls;
pub mod varbag;
pub mod vendors;
