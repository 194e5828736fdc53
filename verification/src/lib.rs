pub mod filter;
pub mod html;
pub mod method;
pub mod request;
pub mod response;
pub mod router;
pub mod server;
pub mod stats;
pub mod text;
