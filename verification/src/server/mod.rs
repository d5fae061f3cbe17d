pub mod auth;
pub mod config;
pub mod db;
pub mod handler;
pub mod routes;
pub mod session;
