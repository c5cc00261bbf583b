pub mod header;
pub mod request;
pub mod response;
pub mod server;
pub mod text;
