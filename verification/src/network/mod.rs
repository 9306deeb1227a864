pub mod messages;
pub mod utils;
pub mod server;
