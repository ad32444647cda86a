//! Device-bound node authentication: the verified core of the auth server
//! (registration, login, subscription delivery, hysteria2 callbacks, admin
//! console) and of the desktop client (session keeping and renewal).

pub mod admin;
pub mod auth;
pub mod clash;
pub mod client;
pub mod config;
pub mod error;
pub mod keyed;
pub mod models;
pub mod node_auth;
pub mod notify;
pub mod num;
pub mod online;
pub mod telegram;
pub mod text;
pub mod tg;
pub mod time;
