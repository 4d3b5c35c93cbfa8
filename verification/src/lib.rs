pub mod config;
pub mod net;
pub mod whitelist;
pub mod socks5;

pub use crate::config::Config;
pub use crate::whitelist::Whitelist;
