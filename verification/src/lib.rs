pub mod authentication;
pub mod configuration;
pub mod domains;
pub mod email_client;
pub mod guarantees;
pub mod http;
pub mod idempotency;
pub mod issue_delivery_worker;
pub mod model;
pub mod newsletter;
pub mod routes;
pub mod startup;
pub mod storage;
pub mod text;
