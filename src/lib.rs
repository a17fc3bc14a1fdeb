//! Probing of hosts over HTTP and HTTPS: targets are expanded into candidate
//! URLs, requests are admitted under a worker limit, and each outcome is
//! classified, titled and reported.
pub mod args;
pub mod arguments;
pub mod engine;
pub mod ports;
pub mod printer;
pub mod readin;
pub mod response;
pub mod sink;
pub mod text;
pub mod urls;
