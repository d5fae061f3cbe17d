pub mod codec;
pub mod desktop;
pub mod protocol;
pub mod server;
pub mod text;
