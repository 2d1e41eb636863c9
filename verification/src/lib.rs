pub mod attribution;
pub mod classify;
pub mod client_ip;
pub mod database;
pub mod errors;
pub mod host;
pub mod ip;
pub mod ip_format;
pub mod ip_text;
pub mod models;
pub mod num;
pub mod region;
pub mod text;
