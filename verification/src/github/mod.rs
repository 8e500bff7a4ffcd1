pub mod api;
pub mod archive;
pub mod auth;
pub mod remote;
pub mod request;
