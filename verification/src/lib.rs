//! Addresses of the uProtocol messaging layer: their long form (text), their micro form
//! (bytes), and the resolution of one address from both.

pub mod decimal;
pub mod error;
pub mod laws;
pub mod micro;
pub mod parser;
pub mod resolver;
pub mod resource;
pub mod serializer;
pub mod text;
pub mod uri;
