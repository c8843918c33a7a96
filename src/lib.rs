pub mod auth;
pub mod client;
pub mod config;
pub mod coverage;
pub mod helpers;
pub mod history;
pub mod measures;
pub mod pagination;
pub mod poller;
pub mod scanner;
pub mod severity;
pub mod text;
pub mod types;
pub mod urls;
