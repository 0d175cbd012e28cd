pub mod api;
pub mod engine;
pub mod error;
pub mod models;
pub mod render;
pub mod text;
pub mod validation;
pub mod web;
