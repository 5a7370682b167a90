//! An image hosting service's request logic: query building, request
//! parsing, routing and the answers the service gives.

pub mod text;
pub mod matcher;
pub mod ext;
pub mod parse;
pub mod comm;
pub mod service;
pub mod api;
pub mod handle;
pub mod upload;
pub mod laws;
