pub mod profiles;
pub mod text;
pub mod router;
pub mod session;
pub mod config;
pub mod client;
pub mod ui;
