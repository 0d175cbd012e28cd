pub mod auth;
pub mod gallery;
pub mod live;
pub mod profile;
pub mod rate_limit;
pub mod register;
pub mod voting;
