pub mod auth;
pub mod external_user_provider;
pub mod user;
pub mod user_token;
