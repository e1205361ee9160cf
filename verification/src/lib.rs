//! Normalisation of REST API descriptions and the state of an interactive
//! browsing session over the normalised endpoints.

pub mod app;
pub mod assoc;
pub mod control;
pub mod decode;
pub mod document;
pub mod event;
pub mod model;
pub mod parameters;
pub mod parser;
pub mod records;
pub mod resolve;
pub mod sorting;
pub mod text;
pub mod ui;
