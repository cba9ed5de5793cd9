pub mod problem;
pub mod etag;
pub mod precondition;
pub mod auth;
pub mod routes;
pub mod views;
