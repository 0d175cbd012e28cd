pub mod matchmaker;
pub mod resolver;
