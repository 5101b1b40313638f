//! Request handling logic of a small VRChat API proxy: splitting the
//! colon-separated requests that clients send, deciding what to fetch,
//! and shaping the profiles and friend lists that go back to clients.

pub mod text;
pub mod sanitize;
pub mod user;
pub mod friends;
pub mod session;
pub mod auth;
pub mod request;
pub mod instance;
