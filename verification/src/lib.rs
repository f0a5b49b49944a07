//! A minimal HTTP/1.1 message codec: raw bytes become a structured
//! [`request::Request`], and a structured [`response::Response`] becomes the
//! exact bytes that go back over the wire.

pub mod bytes;
pub mod package;
pub mod request;
pub mod response;
pub mod router;
pub mod text;
