//! Verified core of a desktop YouTube downloader front end.
pub mod command;
pub mod locate;
pub mod mode;
pub mod platform;
pub mod request;
pub mod settings;
pub mod text;
pub mod ytlog;
