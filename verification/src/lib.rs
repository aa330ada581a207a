//! AISetu: a provider-independent AI conversation bridge.
//!
//! The verified core: canonical conversations and their validation, errors,
//! configuration rules, redaction, translation and extraction of provider
//! payloads, structured extraction, routing, sessions and the decisions of the
//! OpenAI-compatible API.

pub mod text;
pub mod error;
pub mod conversation;
pub mod request;
pub mod response;
pub mod id;
pub mod limits;
pub mod shutdown;
pub mod redact;
pub mod config;
pub mod json;
pub mod extractor;
pub mod normalizer;
pub mod validator;
pub mod translator;
pub mod canonical;
pub mod schema;
pub mod intelligence;
pub mod needle;
pub mod provider;
pub mod registry;
pub mod named;
pub mod session;
pub mod session_store;
pub mod secret;
pub mod capture;
pub mod http_provider;
pub mod api;
pub mod streaming;
pub mod reliability;
pub mod provider_error;
pub mod laws;
