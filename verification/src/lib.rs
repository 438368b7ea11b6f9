//! Error classification and HTTP-response translation.
//!
//! The library defines the closed taxonomy of domain failures ([`error::Error`]),
//! the uniform failure carrier ([`response::FailureSignal`]), and the single
//! dispatch function [`response::translate`] that maps any failure signal to a
//! stable HTTP status code and a structured JSON body.

pub mod error;
pub mod json;
pub mod response;
