pub mod errors;
pub mod routes;
pub mod store;
pub mod types;
