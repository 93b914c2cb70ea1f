pub mod text;
pub mod error;
pub mod validation;
pub mod lifecycle;
pub mod json;
pub mod model;
pub mod access;
pub mod results;
pub mod rounds;
pub mod scoring;
pub mod builtins;
pub mod tournament;
pub mod teams;
pub mod events;
pub mod communication;
pub mod charts;
pub mod phira;
pub mod inputs;
pub mod oauth;
pub mod diagnostics;
