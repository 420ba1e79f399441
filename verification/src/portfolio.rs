pub mod domain;
pub mod service;
