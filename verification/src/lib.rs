//! Catalog resolution, schema validation and canvas block targeting for
//! agent-driven interactive panels.

pub mod blocks;
pub mod canvas;
pub mod catalog;
pub mod decode;
pub mod event;
pub mod explorer;
pub mod form_state;
pub mod instructions;
pub mod intent;
pub mod intent_text;
pub mod json;
pub mod loading;
pub mod manager;
pub mod order;
pub mod persist;
pub mod ranking;
pub mod registry;
pub mod resolve;
pub mod runtime;
pub mod schema;
pub mod session;
pub mod text;
pub mod tooling;
pub mod validate;
pub mod workspace;
