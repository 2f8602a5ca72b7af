pub mod auth;
pub mod catalog;
pub mod cleaner;
pub mod db;
pub mod parser;
pub mod session;
pub mod snapshot;
pub mod strmap;
pub mod text;
