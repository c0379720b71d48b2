//! A CGI-style QR-code generator library.
//!
//! Given a payload (from the request path) and a URL-encoded query string,
//! the pipeline parses rendering options, builds a QR symbol, renders it as
//! PNG, AVIF or SVG, and assembles an HTTP response (headers plus body).
//! Parsing, option defaulting, dispatch and response assembly are verified;
//! QR symbol construction and image encoding are performed by outside
//! libraries behind trusted contracts.

pub mod color;
pub mod options;
pub mod parse;
pub mod pipeline;
pub mod render;
pub mod response;
pub mod symbol;
