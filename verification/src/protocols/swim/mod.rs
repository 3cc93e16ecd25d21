pub mod messages;
pub mod swim;
pub mod routes;
pub mod http_client;
