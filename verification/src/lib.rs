pub mod api_version;
pub mod argon;
pub mod authorization;
pub mod changes;
pub mod clock;
pub mod context;
pub mod dataloaders;
pub mod db;
pub mod env;
pub mod errors;
pub mod guards;
pub mod input;
pub mod jwt;
pub mod models;
pub mod mutation;
pub mod pagination;
pub mod random;
pub mod redis;
pub mod request;
pub mod text;
pub mod token;
