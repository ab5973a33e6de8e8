//! Types shared across the AI-facing parts of the client.

pub mod types;
